use crate::error::ExportError;
use crate::mask::MaskParams;
use crate::naming::{output_name_for, output_name_spec, path_stem, NamingMode};
use crate::pixels::{PixelBuffer, PixelGrid};
use crate::transform::{transform, transformed, CropRect, MaskShape, TargetSize};
use vstd::prelude::*;
use vstd::string::StringExecFns;

verus! {

/// One image found for a batch: where it lies, the name shown for it, and its
/// extension in lower case.
#[derive(Clone, Debug, PartialEq, Eq)]
pub struct BatchItem {
    pub path: String,
    pub name: String,
    pub ext: String,
}

/// The text of a batch item.
pub struct ItemView {
    pub path: Seq<char>,
    pub name: Seq<char>,
    pub ext: Seq<char>,
}

impl View for BatchItem {
    type V = ItemView;

    open spec fn view(&self) -> ItemView {
        ItemView { path: self.path@, name: self.name@, ext: self.ext@ }
    }
}

/// The views of the items, in their order.
pub open spec fn item_views(items: Seq<BatchItem>) -> Seq<ItemView> {
    Seq::new(items.len(), |i: int| items[i]@)
}

/// Tells the caller that work on an item begins: its position counted from
/// one, the number of items, and its name.
#[derive(Clone, Debug, PartialEq, Eq)]
pub struct ExportProgress {
    pub current_index: usize,
    pub total: usize,
    pub file_name: String,
}

/// The result of a batch: how many images were written, how many were passed
/// over because the crop did not fit them, and the messages, in the order in
/// which they arose.
#[derive(Clone, Debug, PartialEq, Eq)]
pub struct ExportSummary {
    pub exported: usize,
    pub skipped: usize,
    pub errors: Vec<String>,
}

/// The mathematical content of a summary.
pub struct SummaryView {
    pub exported: nat,
    pub skipped: nat,
    pub errors: Seq<Seq<char>>,
}

/// The texts of a list of strings.
pub open spec fn texts(lines: Seq<String>) -> Seq<Seq<char>> {
    Seq::new(lines.len(), |i: int| lines[i]@)
}

impl View for ExportSummary {
    type V = SummaryView;

    open spec fn view(&self) -> SummaryView {
        SummaryView {
            exported: self.exported as nat,
            skipped: self.skipped as nat,
            errors: texts(self.errors@),
        }
    }
}

impl SummaryView {
    /// The summary before anything happened.
    pub open spec fn empty() -> SummaryView {
        SummaryView { exported: 0, skipped: 0, errors: Seq::empty() }
    }

    /// The number of items that the summary accounts for.
    pub open spec fn accounted(self) -> nat {
        self.exported + self.skipped + self.errors.len()
    }

    /// One more image written.
    pub open spec fn with_export(self) -> SummaryView {
        SummaryView { exported: self.exported + 1, ..self }
    }

    /// One more image passed over.
    pub open spec fn with_skip(self) -> SummaryView {
        SummaryView { skipped: self.skipped + 1, ..self }
    }

    /// One more message.
    pub open spec fn with_error(self, text: Seq<char>) -> SummaryView {
        SummaryView { errors: self.errors.push(text), ..self }
    }
}

/// The message of a run that found nothing to do.
pub open spec fn nothing_found_text() -> Seq<char> {
    "No supported images found."@
}

/// The message that ends a cancelled run.
pub open spec fn cancelled_text() -> Seq<char> {
    ExportError::Cancelled.message_spec()
}

/// A message about one item: its name, a colon, and what went wrong.
pub open spec fn item_message(name: Seq<char>, detail: Seq<char>) -> Seq<char> {
    name + ": "@ + detail
}

/// What is the same for every item of a batch.
#[derive(Clone, Copy, Debug, PartialEq, Eq)]
pub struct BatchConfig {
    pub crop: CropRect,
    pub shape: MaskShape,
    pub mask: MaskParams,
    pub target: TargetSize,
    pub naming: NamingMode,
}

/// Where a run stands.
#[derive(Clone, Copy, Debug, PartialEq, Eq, Structural)]
pub enum BatchPhase {
    /// Between two items: the run waits to hear whether it was cancelled.
    Polling,
    /// The run waits for the pixels of the current item.
    Loading,
    /// The run waits to hear how writing the current item's image went.
    Writing,
    /// Every item was dealt with.
    Completed,
    /// The run was stopped before it reached its end.
    Cancelled,
}

/// What the caller reports to a run.
pub enum BatchEvent {
    /// The cancellation signal was read.
    Polled { cancelled: bool },
    /// The current item was read and decoded, or could not be; the error
    /// carries the decoder's words.
    Loaded(Result<PixelBuffer, String>),
    /// The image of the current item was written, or could not be.
    Written(Result<(), ExportError>),
}

/// What a run asks its caller to do next.
#[derive(Clone, Debug, PartialEq, Eq)]
pub enum BatchAction {
    /// Read the cancellation signal and report it.
    PollCancellation,
    /// Announce the progress, then read and decode the image at `path`.
    LoadImage { progress: ExportProgress, path: String },
    /// Write the pending image under `file_name` in the output directory.
    WriteImage { file_name: String },
    /// Nothing is left to do: take the summary.
    Finish,
}

/// The mathematical content of an action.
pub enum ActionView {
    PollCancellation,
    LoadImage { current_index: nat, total: nat, file_name: Seq<char>, path: Seq<char> },
    WriteImage { file_name: Seq<char> },
    Finish,
}

impl View for BatchAction {
    type V = ActionView;

    open spec fn view(&self) -> ActionView {
        match self {
            BatchAction::PollCancellation => ActionView::PollCancellation,
            BatchAction::LoadImage { progress, path } => ActionView::LoadImage {
                current_index: progress.current_index as nat,
                total: progress.total as nat,
                file_name: progress.file_name@,
                path: path@,
            },
            BatchAction::WriteImage { file_name } => ActionView::WriteImage {
                file_name: file_name@,
            },
            BatchAction::Finish => ActionView::Finish,
        }
    }
}

/// What became of one item.
pub enum ItemOutcome {
    /// Its image was written.
    Exported,
    /// The crop did not fit it.
    Skipped,
    /// It failed, with this message.
    Failed(Seq<char>),
    /// Its image is ready and waits to be written.
    Ready(PixelGrid),
}

impl SummaryView {
    /// The summary with the outcome of one more item.
    pub open spec fn record(self, outcome: ItemOutcome) -> SummaryView {
        match outcome {
            ItemOutcome::Exported => self.with_export(),
            ItemOutcome::Skipped => self.with_skip(),
            ItemOutcome::Failed(text) => self.with_error(text),
            ItemOutcome::Ready(_) => self,
        }
    }
}

/// What loading and transforming decide about the item called `name`. An
/// item that cannot be read fails with the decoder's words. A crop that does
/// not fit the image passes the item over without a message. Any other
/// failure of the transform is reported under the item's name.
pub open spec fn outcome_of_load(
    config: BatchConfig,
    name: Seq<char>,
    loaded: Result<PixelGrid, Seq<char>>,
) -> ItemOutcome {
    match loaded {
        Err(detail) => ItemOutcome::Failed(item_message(name, "Load failed: "@ + detail)),
        Ok(source) => match transformed(
            source,
            config.crop,
            config.shape,
            config.mask,
            config.target.width as nat,
            config.target.height as nat,
        ) {
            Ok(image) => ItemOutcome::Ready(image),
            Err(ExportError::CropOutOfBounds) => ItemOutcome::Skipped,
            Err(reason) => ItemOutcome::Failed(item_message(name, reason.message_spec())),
        },
    }
}

/// What the report on writing decides about the item called `name`.
pub open spec fn outcome_of_write(name: Seq<char>, written: Result<(), ExportError>) -> ItemOutcome {
    match written {
        Ok(_) => ItemOutcome::Exported,
        Err(reason) => ItemOutcome::Failed(item_message(name, reason.message_spec())),
    }
}

/// The mathematical content of a run.
pub struct RunState {
    pub items: Seq<ItemView>,
    pub config: BatchConfig,
    /// How many items have been dealt with.
    pub position: nat,
    pub phase: BatchPhase,
    /// The image that waits to be written.
    pub pending: Option<PixelGrid>,
    pub summary: SummaryView,
}

impl RunState {
    /// Whether the run has come to its end.
    pub open spec fn finished(self) -> bool {
        self.phase == BatchPhase::Completed || self.phase == BatchPhase::Cancelled
    }

    /// The state is one that a run can be in. While the run goes on, the
    /// target has pixels and the summary accounts for exactly the items dealt
    /// with; a cancelled run holds one more message, the last one, which says
    /// so.
    pub open spec fn wf(self) -> bool {
        &&& self.position <= self.items.len()
        &&& (self.phase == BatchPhase::Writing <==> self.pending is Some)
        &&& match self.phase {
            BatchPhase::Polling | BatchPhase::Loading | BatchPhase::Writing => {
                &&& self.position < self.items.len()
                &&& self.summary.accounted() == self.position
                &&& self.config.target.width > 0
                &&& self.config.target.height > 0
            },
            BatchPhase::Completed => {
                &&& self.position == self.items.len()
                &&& if self.items.len() == 0 {
                    self.summary == SummaryView::empty().with_error(nothing_found_text())
                } else {
                    self.summary.accounted() == self.position
                }
            },
            BatchPhase::Cancelled => {
                &&& self.position < self.items.len()
                &&& self.summary.accounted() == self.position + 1
                &&& self.summary.errors.len() > 0
                &&& self.summary.errors.last() == cancelled_text()
            },
        }
    }

    /// The name of the item that the run is at.
    pub open spec fn current_name(self) -> Seq<char> {
        self.items[self.position as int].name
    }

    /// The state after the current item has come to `outcome`: an image that
    /// is ready waits to be written; anything else is entered in the summary,
    /// and the run moves on to the next item or is complete.
    pub open spec fn settle(self, outcome: ItemOutcome) -> RunState {
        match outcome {
            ItemOutcome::Ready(image) => RunState {
                phase: BatchPhase::Writing,
                pending: Some(image),
                ..self
            },
            _ => RunState {
                position: self.position + 1,
                phase: if self.position + 1 == self.items.len() {
                    BatchPhase::Completed
                } else {
                    BatchPhase::Polling
                },
                pending: None,
                summary: self.summary.record(outcome),
                ..self
            },
        }
    }

    /// The state after the cancellation signal was read. Only a run between
    /// two items listens; a cancelled one ends with a last message, any other
    /// goes on to load its current item.
    pub open spec fn polled(self, cancelled: bool) -> RunState {
        if self.phase != BatchPhase::Polling {
            self
        } else if cancelled {
            RunState {
                phase: BatchPhase::Cancelled,
                summary: self.summary.with_error(cancelled_text()),
                ..self
            }
        } else {
            RunState { phase: BatchPhase::Loading, ..self }
        }
    }

    /// The state after the current item was loaded, or could not be. Only a
    /// run that waits for pixels listens.
    pub open spec fn loaded(self, loaded: Result<PixelGrid, Seq<char>>) -> RunState {
        if self.phase != BatchPhase::Loading {
            self
        } else {
            self.settle(outcome_of_load(self.config, self.current_name(), loaded))
        }
    }

    /// The state after the pending image was written, or could not be. Only
    /// a run that waits for a write listens.
    pub open spec fn written(self, written: Result<(), ExportError>) -> RunState {
        if self.phase != BatchPhase::Writing {
            self
        } else {
            self.settle(outcome_of_write(self.current_name(), written))
        }
    }

    /// The state after `event`.
    pub open spec fn step(self, event: BatchEvent) -> RunState {
        match event {
            BatchEvent::Polled { cancelled } => self.polled(cancelled),
            BatchEvent::Loaded(Ok(image)) => self.loaded(Ok(image@)),
            BatchEvent::Loaded(Err(detail)) => self.loaded(Err(detail@)),
            BatchEvent::Written(written) => self.written(written),
        }
    }

    /// What the run asks for in this state.
    pub open spec fn action(self) -> ActionView {
        match self.phase {
            BatchPhase::Polling => ActionView::PollCancellation,
            BatchPhase::Loading => ActionView::LoadImage {
                current_index: self.position + 1,
                total: self.items.len(),
                file_name: self.current_name(),
                path: self.items[self.position as int].path,
            },
            BatchPhase::Writing => ActionView::WriteImage {
                file_name: output_name_spec(
                    path_stem(self.items[self.position as int].path),
                    self.config.naming,
                ),
            },
            BatchPhase::Completed | BatchPhase::Cancelled => ActionView::Finish,
        }
    }

    /// The state in which a run over `items` begins. Without items the run is
    /// complete at once and says that it found nothing. Otherwise the naming
    /// mode must be a known one and the target must have pixels, in this
    /// order, and the run waits at its first item.
    pub open spec fn start(
        items: Seq<ItemView>,
        crop: CropRect,
        shape: MaskShape,
        mask: MaskParams,
        target: TargetSize,
        naming_mode: Seq<char>,
    ) -> Result<RunState, ExportError> {
        if items.len() == 0 {
            Ok(
                RunState {
                    items,
                    config: BatchConfig { crop, shape, mask, target, naming: NamingMode::Identity },
                    position: 0,
                    phase: BatchPhase::Completed,
                    pending: None,
                    summary: SummaryView::empty().with_error(nothing_found_text()),
                },
            )
        } else {
            match NamingMode::parse_spec(naming_mode) {
                Err(reason) => Err(reason),
                Ok(naming) => if target.width == 0 || target.height == 0 {
                    Err(ExportError::InvalidTargetSize)
                } else {
                    Ok(
                        RunState {
                            items,
                            config: BatchConfig { crop, shape, mask, target, naming },
                            position: 0,
                            phase: BatchPhase::Polling,
                            pending: None,
                            summary: SummaryView::empty(),
                        },
                    )
                },
            }
        }
    }
}

impl BatchEvent {
    /// An image that the event brings is a sound buffer.
    pub open spec fn wf(self) -> bool {
        match self {
            BatchEvent::Loaded(Ok(image)) => image.wf(),
            _ => true,
        }
    }
}

/// A batch export in progress. The run decides; its caller reads, writes and
/// reports. Each call of `step` takes what the caller reports and answers
/// with what to do next.
pub struct BatchRun {
    items: Vec<BatchItem>,
    config: BatchConfig,
    position: usize,
    phase: BatchPhase,
    pending: Option<PixelBuffer>,
    summary: ExportSummary,
}

impl View for BatchRun {
    type V = RunState;

    closed spec fn view(&self) -> RunState {
        RunState {
            items: item_views(self.items@),
            config: self.config,
            position: self.position as nat,
            phase: self.phase,
            pending: match self.pending {
                Some(image) => Some(image@),
                None => None,
            },
            summary: self.summary@,
        }
    }
}

impl BatchRun {
    /// An image that waits to be written is a sound buffer.
    pub closed spec fn pending_wf(&self) -> bool {
        match self.pending {
            Some(image) => image.wf(),
            None => true,
        }
    }

    /// The run is in a state that a run can be in, and an image that waits to
    /// be written is a sound buffer.
    pub open spec fn wf(&self) -> bool {
        &&& self@.wf()
        &&& self.pending_wf()
    }

    /// Begins a run over `items`, which are taken in the order given.
    pub fn start(
        items: Vec<BatchItem>,
        crop: CropRect,
        shape: MaskShape,
        mask: MaskParams,
        target: TargetSize,
        naming_mode: &str,
    ) -> (begun: Result<BatchRun, ExportError>)
        ensures
            match RunState::start(item_views(items@), crop, shape, mask, target, naming_mode@) {
                Ok(state) => begun matches Ok(run) && run.wf() && run@ == state,
                Err(reason) => begun matches Err(given) && given == reason,
            },
    {
        if items.len() == 0 {
            let mut errors: Vec<String> = Vec::new();
            errors.push(String::from_str("No supported images found."));
            let summary = ExportSummary { exported: 0, skipped: 0, errors };
            assert(summary@.errors =~= SummaryView::empty().with_error(
                nothing_found_text(),
            ).errors);
            return Ok(
                BatchRun {
                    items,
                    config: BatchConfig { crop, shape, mask, target, naming: NamingMode::Identity },
                    position: 0,
                    phase: BatchPhase::Completed,
                    pending: None,
                    summary,
                },
            );
        }
        let naming = match NamingMode::parse(naming_mode) {
            Ok(naming) => naming,
            Err(reason) => {
                return Err(reason);
            },
        };
        if target.width == 0 || target.height == 0 {
            return Err(ExportError::InvalidTargetSize);
        }
        let summary = ExportSummary { exported: 0, skipped: 0, errors: Vec::new() };
        assert(summary@.errors =~= SummaryView::empty().errors);
        Ok(
            BatchRun {
                items,
                config: BatchConfig { crop, shape, mask, target, naming },
                position: 0,
                phase: BatchPhase::Polling,
                pending: None,
                summary,
            },
        )
    }

    /// Where the run stands.
    pub fn phase(&self) -> (phase: BatchPhase)
        ensures
            phase == self@.phase,
    {
        self.phase
    }

    /// Whether the run has come to its end.
    pub fn is_finished(&self) -> (done: bool)
        ensures
            done == self@.finished(),
    {
        match self.phase {
            BatchPhase::Completed | BatchPhase::Cancelled => true,
            _ => false,
        }
    }

    /// The summary as it stands.
    pub fn summary(&self) -> (summary: &ExportSummary)
        ensures
            summary@ == self@.summary,
    {
        &self.summary
    }

    /// Gives up the run for its summary.
    pub fn into_summary(self) -> (summary: ExportSummary)
        ensures
            summary@ == self@.summary,
    {
        self.summary
    }

    /// The image that waits to be written, while one does.
    pub fn pending_image(&self) -> (image: Option<&PixelBuffer>)
        requires
            self.wf(),
        ensures
            match image {
                Some(image) => image.wf() && self@.pending == Some(image@),
                None => self@.pending is None,
            },
    {
        self.pending.as_ref()
    }

    /// What the run asks its caller to do next.
    pub fn action(&self) -> (action: BatchAction)
        requires
            self.wf(),
        ensures
            action@ == self@.action(),
    {
        match self.phase {
            BatchPhase::Polling => BatchAction::PollCancellation,
            BatchPhase::Loading => {
                let total: usize = self.items.len();
                let item = &self.items[self.position];
                BatchAction::LoadImage {
                    progress: ExportProgress {
                        current_index: self.position + 1,
                        total,
                        file_name: item.name.clone(),
                    },
                    path: item.path.clone(),
                }
            },
            BatchPhase::Writing => {
                let item = &self.items[self.position];
                BatchAction::WriteImage {
                    file_name: output_name_for(item.path.as_str(), self.config.naming),
                }
            },
            BatchPhase::Completed | BatchPhase::Cancelled => BatchAction::Finish,
        }
    }

    /// Enters the outcome of the current item and moves on.
    fn settle(&mut self, outcome: Settled)
        requires
            old(self).wf(),
            old(self)@.phase == BatchPhase::Loading || old(self)@.phase == BatchPhase::Writing,
            outcome.wf(),
        ensures
            final(self).wf(),
            final(self)@ == old(self)@.settle(outcome@),
    {
        let total: usize = self.items.len();
        assert(self.summary@.accounted() == self.position < total);
        match outcome {
            Settled::Ready(image) => {
                self.phase = BatchPhase::Writing;
                self.pending = Some(image);
            },
            Settled::Exported => {
                self.summary.exported = self.summary.exported + 1;
                self.advance();
            },
            Settled::Skipped => {
                self.summary.skipped = self.summary.skipped + 1;
                self.advance();
            },
            Settled::Failed(text) => {
                let ghost before = self.summary@.errors;
                self.summary.errors.push(text);
                assert(self.summary@.errors =~= before.push(text@));
                self.advance();
            },
        }
    }

    /// Moves on to the next item, or completes the run after the last one.
    fn advance(&mut self)
        requires
            old(self).position < old(self).items.len(),
        ensures
            final(self).items == old(self).items,
            final(self).config == old(self).config,
            final(self).summary == old(self).summary,
            final(self).position == old(self).position + 1,
            final(self).pending is None,
            final(self).phase == if old(self).position + 1 == old(self).items.len() {
                BatchPhase::Completed
            } else {
                BatchPhase::Polling
            },
    {
        self.position = self.position + 1;
        self.pending = None;
        self.phase = if self.position == self.items.len() {
            BatchPhase::Completed
        } else {
            BatchPhase::Polling
        };
    }

    /// Takes what the caller reports and answers with what to do next. A
    /// report that the run is not waiting for changes nothing, and the run
    /// asks again for what it waits for.
    pub fn step(&mut self, event: BatchEvent) -> (action: BatchAction)
        requires
            old(self).wf(),
            event.wf(),
        ensures
            final(self).wf(),
            final(self)@ == old(self)@.step(event),
            action@ == final(self)@.action(),
    {
        match event {
            BatchEvent::Polled { cancelled } => {
                if let BatchPhase::Polling = self.phase {
                    if cancelled {
                        let ghost before = self.summary@.errors;
                        let text = ExportError::Cancelled.message();
                        self.summary.errors.push(text);
                        assert(self.summary@.errors =~= before.push(cancelled_text()));
                        self.phase = BatchPhase::Cancelled;
                    } else {
                        self.phase = BatchPhase::Loading;
                    }
                }
            },
            BatchEvent::Loaded(loaded) => {
                if let BatchPhase::Loading = self.phase {
                    let outcome = self.judge_load(loaded);
                    self.settle(outcome);
                }
            },
            BatchEvent::Written(written) => {
                if let BatchPhase::Writing = self.phase {
                    let outcome = match written {
                        Ok(_) => Settled::Exported,
                        Err(reason) => Settled::Failed(
                            self.message_for(reason.message().as_str()),
                        ),
                    };
                    self.settle(outcome);
                }
            },
        }
        self.action()
    }

    /// The message about the current item that says `detail`.
    fn message_for(&self, detail: &str) -> (text: String)
        requires
            self.position < self.items.len(),
        ensures
            text@ == item_message(self@.current_name(), detail@),
    {
        let mut text = self.items[self.position].name.clone();
        text.append(": ");
        text.append(detail);
        text
    }

    /// Decides what loading and transforming make of the current item.
    fn judge_load(&self, loaded: Result<PixelBuffer, String>) -> (outcome: Settled)
        requires
            self.wf(),
            self@.phase == BatchPhase::Loading,
            loaded matches Ok(image) ==> image.wf(),
        ensures
            outcome.wf(),
            outcome@ == outcome_of_load(
                self@.config,
                self@.current_name(),
                match loaded {
                    Ok(image) => Ok(image@),
                    Err(detail) => Err(detail@),
                },
            ),
    {
        match loaded {
            Err(detail) => {
                let reason = ExportError::LoadFailed(detail);
                Settled::Failed(self.message_for(reason.message().as_str()))
            },
            Ok(source) => match transform(
                &source,
                self.config.crop,
                self.config.shape,
                self.config.mask,
                self.config.target,
            ) {
                Ok(image) => Settled::Ready(image),
                Err(ExportError::CropOutOfBounds) => Settled::Skipped,
                Err(reason) => Settled::Failed(self.message_for(reason.message().as_str())),
            },
        }
    }
}

/// What the caller reports about one item of a run that is not cancelled:
/// how loading went and, where an image came of it, how writing went.
pub struct ItemReport {
    pub loaded: Result<PixelGrid, Seq<char>>,
    pub written: Result<(), ExportError>,
}

/// What becomes of the item called `name` under `report`. The report's word
/// on writing counts only where loading and transforming gave an image.
pub open spec fn outcome_of_item(config: BatchConfig, name: Seq<char>, report: ItemReport) -> ItemOutcome {
    match outcome_of_load(config, name, report.loaded) {
        ItemOutcome::Ready(_) => outcome_of_write(name, report.written),
        outcome => outcome,
    }
}

/// The summary of the first `count` items: the outcomes entered one after
/// another, from the first item on.
pub open spec fn tally(
    config: BatchConfig,
    items: Seq<ItemView>,
    reports: Seq<ItemReport>,
    count: nat,
) -> SummaryView
    decreases count,
{
    if count == 0 {
        SummaryView::empty()
    } else {
        tally(config, items, reports, (count - 1) as nat).record(
            outcome_of_item(config, items[count - 1].name, reports[count - 1]),
        )
    }
}

impl RunState {
    /// The state after one whole item: the signal is read and found clear,
    /// the item is loaded, and its image, if there is one, is written.
    pub open spec fn after_item(self, report: ItemReport) -> RunState {
        self.polled(false).loaded(report.loaded).written(report.written)
    }

    /// The state after the first `count` reports, one item each.
    pub open spec fn after_items(self, reports: Seq<ItemReport>, count: nat) -> RunState
        decreases count,
    {
        if count == 0 {
            self
        } else {
            self.after_items(reports, (count - 1) as nat).after_item(reports[count - 1])
        }
    }

    /// Whether a run begins in this state: it waits at its first item with an
    /// empty summary.
    pub open spec fn fresh(self) -> bool {
        &&& self.wf()
        &&& self.phase == BatchPhase::Polling
        &&& self.position == 0
        &&& self.summary == SummaryView::empty()
    }
}

/// A run over a listing that is not empty is refused for its naming mode
/// exactly if the mode is neither `ui` nor `cropped`, whatever else is asked
/// for; with a known mode it is refused exactly if the target has a zero
/// side, and otherwise it begins at the first item.
pub proof fn lemma_start_of_run(
    items: Seq<ItemView>,
    crop: CropRect,
    shape: MaskShape,
    mask: MaskParams,
    target: TargetSize,
    naming_mode: Seq<char>,
)
    requires
        items.len() > 0,
    ensures
        RunState::start(items, crop, shape, mask, target, naming_mode) == Err::<
            RunState,
            ExportError,
        >(ExportError::InvalidConfig) <==> (naming_mode != "ui"@ && naming_mode != "cropped"@),
        RunState::start(items, crop, shape, mask, target, naming_mode) == Err::<
            RunState,
            ExportError,
        >(ExportError::InvalidTargetSize) <==> ((naming_mode == "ui"@ || naming_mode
            == "cropped"@) && (target.width == 0 || target.height == 0)),
        RunState::start(items, crop, shape, mask, target, naming_mode) matches Ok(state)
            ==> state.fresh() && state.items == items,
{
}

/// A run over an empty listing is complete at once, whatever else is asked
/// for: it counts nothing and says that it found nothing.
pub proof fn lemma_start_without_items(
    crop: CropRect,
    shape: MaskShape,
    mask: MaskParams,
    target: TargetSize,
    naming_mode: Seq<char>,
)
    ensures
        RunState::start(Seq::empty(), crop, shape, mask, target, naming_mode) matches Ok(state)
            && state.wf() && state.phase == BatchPhase::Completed && state.summary
            == SummaryView::empty().with_error(nothing_found_text()),
{
}

/// Every step leads from a sound state to a sound state, never takes back
/// what the summary holds, and never goes back to an earlier item.
pub proof fn lemma_step_keeps_state_sound(state: RunState, event: BatchEvent)
    requires
        state.wf(),
    ensures
        state.step(event).wf(),
        state.step(event).items == state.items,
        state.step(event).config == state.config,
        state.step(event).position >= state.position,
        state.step(event).summary.exported >= state.summary.exported,
        state.step(event).summary.skipped >= state.summary.skipped,
        state.summary.errors.is_prefix_of(state.step(event).summary.errors),
{
    let next = state.step(event);
    assert(state.summary.errors.is_prefix_of(next.summary.errors)) by {
        if next.summary.errors != state.summary.errors {
            assert(next.summary.errors.len() == state.summary.errors.len() + 1);
            assert(next.summary.errors.subrange(0, state.summary.errors.len() as int)
                =~= state.summary.errors);
        }
    }
}

/// A run that has come to its end stays as it is, whatever is reported.
pub proof fn lemma_finished_run_is_final(state: RunState, event: BatchEvent)
    requires
        state.finished(),
    ensures
        state.step(event) == state,
        state.action() == ActionView::Finish,
{
}

/// A crop with an area that reaches beyond the loaded image passes the item
/// over: the count of skipped items grows by one, no message is added, and
/// no image waits to be written.
pub proof fn lemma_crop_out_of_bounds_is_skipped(state: RunState, source: PixelGrid)
    requires
        state.wf(),
        state.phase == BatchPhase::Loading,
        state.config.crop.w > 0,
        state.config.crop.h > 0,
        state.config.crop.x + state.config.crop.w > source.width || state.config.crop.y
            + state.config.crop.h > source.height,
    ensures
        state.loaded(Ok(source)).summary == state.summary.with_skip(),
        state.loaded(Ok(source)).pending is None,
        state.loaded(Ok(source)).phase != BatchPhase::Writing,
        state.loaded(Ok(source)).position == state.position + 1,
{
}

/// Cancellation before an item begins ends the run there. The items before it
/// stay counted as they were, the item itself and all that follow it are
/// neither counted nor reported, the last message says that the run was
/// cancelled, and whatever is reported afterwards changes nothing.
pub proof fn lemma_cancellation_ends_run(state: RunState, later: BatchEvent)
    requires
        state.wf(),
        state.phase == BatchPhase::Polling,
    ensures
        state.polled(true).wf(),
        state.polled(true).phase == BatchPhase::Cancelled,
        state.polled(true).position == state.position,
        state.polled(true).summary.exported == state.summary.exported,
        state.polled(true).summary.skipped == state.summary.skipped,
        state.polled(true).summary.errors == state.summary.errors.push(cancelled_text()),
        state.polled(true).summary.errors.last() == cancelled_text(),
        state.polled(true).action() == ActionView::Finish,
        state.polled(true).step(later) == state.polled(true),
{
}

/// A run that is not cancelled deals with its items one by one. After `count`
/// of them it stands at the next item, or is complete after the last one, and
/// its summary is the tally of those `count` items and accounts for each of
/// them exactly once.
pub proof fn lemma_run_follows_tally(start: RunState, reports: Seq<ItemReport>, count: nat)
    requires
        start.fresh(),
        count <= start.items.len(),
        count <= reports.len(),
    ensures
        start.after_items(reports, count).wf(),
        start.after_items(reports, count).items == start.items,
        start.after_items(reports, count).config == start.config,
        start.after_items(reports, count).position == count,
        start.after_items(reports, count).pending is None,
        start.after_items(reports, count).phase == if count == start.items.len() {
            BatchPhase::Completed
        } else {
            BatchPhase::Polling
        },
        start.after_items(reports, count).summary == tally(
            start.config,
            start.items,
            reports,
            count,
        ),
        tally(start.config, start.items, reports, count).accounted() == count,
    decreases count,
{
    if count > 0 {
        lemma_run_follows_tally(start, reports, (count - 1) as nat);
        let before = start.after_items(reports, (count - 1) as nat);
        let report = reports[count - 1];
        let name = before.current_name();
        let at_load = before.polled(false);
        let first = outcome_of_load(before.config, name, report.loaded);
        match first {
            ItemOutcome::Ready(image) => {
                assert(at_load.loaded(report.loaded).phase == BatchPhase::Writing);
            },
            _ => {
                assert(at_load.loaded(report.loaded).phase != BatchPhase::Writing);
            },
        }
    }
}

/// Cancelled before item `count + 1` of a run, the summary is the tally of the
/// first `count` items followed by the message that the run was cancelled.
pub proof fn lemma_cancelled_run_summary(start: RunState, reports: Seq<ItemReport>, count: nat)
    requires
        start.fresh(),
        count < start.items.len(),
        count <= reports.len(),
    ensures
        start.after_items(reports, count).polled(true).phase == BatchPhase::Cancelled,
        start.after_items(reports, count).polled(true).summary == tally(
            start.config,
            start.items,
            reports,
            count,
        ).with_error(cancelled_text()),
{
    lemma_run_follows_tally(start, reports, count);
}

/// The tally depends on the outcomes of the items alone: two series of
/// reports under which each item comes to the same outcome give the same
/// counts and the same messages in the same order.
pub proof fn lemma_tally_is_determined(
    config: BatchConfig,
    items: Seq<ItemView>,
    first: Seq<ItemReport>,
    second: Seq<ItemReport>,
    count: nat,
)
    requires
        count <= items.len(),
        count <= first.len(),
        count <= second.len(),
        forall|i: int|
            0 <= i < count ==> outcome_of_item(config, items[i].name, first[i]) == outcome_of_item(
                config,
                items[i].name,
                second[i],
            ),
    ensures
        tally(config, items, first, count) == tally(config, items, second, count),
    decreases count,
{
    if count > 0 {
        lemma_tally_is_determined(config, items, first, second, (count - 1) as nat);
    }
}

/// Two runs over the same items with the same settings, neither of them
/// cancelled, go through the same states if the same is reported to both:
/// they ask for the same images to be written under the same names, and they
/// end complete with the same summary.
pub proof fn lemma_runs_agree(
    first: RunState,
    second: RunState,
    reports: Seq<ItemReport>,
    count: nat,
)
    requires
        first.fresh(),
        second.fresh(),
        first.items == second.items,
        first.config == second.config,
        reports.len() == first.items.len(),
        count <= reports.len(),
    ensures
        first.after_items(reports, count) == second.after_items(reports, count),
        first.after_items(reports, reports.len()).summary == second.after_items(
            reports,
            reports.len(),
        ).summary,
        first.after_items(reports, reports.len()).phase == BatchPhase::Completed,
        second.after_items(reports, reports.len()).phase == BatchPhase::Completed,
{
    assert(first == second);
    lemma_run_follows_tally(first, reports, reports.len());
}

/// The outcome of one item, as the run holds it.
enum Settled {
    Exported,
    Skipped,
    Failed(String),
    Ready(PixelBuffer),
}

impl View for Settled {
    type V = ItemOutcome;

    closed spec fn view(&self) -> ItemOutcome {
        match self {
            Settled::Exported => ItemOutcome::Exported,
            Settled::Skipped => ItemOutcome::Skipped,
            Settled::Failed(text) => ItemOutcome::Failed(text@),
            Settled::Ready(image) => ItemOutcome::Ready(image@),
        }
    }
}

impl Settled {
    spec fn wf(self) -> bool {
        match self {
            Settled::Ready(image) => image.wf(),
            _ => true,
        }
    }
}

} // verus!
