//! The command dispatcher: how an inbound message changes the device state,
//! and which steps the caller has to carry out for it, in order.

use crate::schema::AimCommand;
use crate::schema::AvailablePatterns;
use crate::schema::Config;
use crate::schema::CorrectionPatternDeltas;
use crate::schema::DefaultState;
use crate::schema::EmbeddedCommand;
use crate::schema::LaserCommand;
use crate::schema::LaserState;
use crate::schema::Message;
use crate::schema::MessageData;
use crate::schema::MessageType;
use crate::schema::PatternParams;
use crate::schema::Subtopic;
use vstd::prelude::*;
use vstd::string::*;

verus! {

/// The optical configuration of the device.
#[derive(Debug, Clone, PartialEq, Eq)]
pub struct State {
    pub wavelength: u32,
    pub fresnel: u32,
    pub pattern_params: PatternParams,
}

/// The dispatcher's context: the configuration, the device state, and the
/// topic on which everything it sends is published.
#[derive(Debug, Clone, PartialEq, Eq)]
pub struct Context {
    pub config: Config,
    pub state: State,
    pub main_topic_aim: String,
}

/// One step that the caller carries out for the dispatcher. The steps of one
/// message are carried out in order, and the first that fails ends them.
#[derive(Debug, Clone, PartialEq, Eq)]
pub enum Action {
    /// Ask the laser subsystem for its current state.
    RequestLasers,
    /// Scan the pattern files and publish the catalog.
    ReportPatterns,
    /// Publish the current device state.
    ReportState,
    /// Compute the pattern from the device state and present it.
    Present,
    /// Publish the acknowledgment of a pre-stack command.
    AcknowledgePreStack,
    /// Decode an uploaded image and store it among the custom patterns.
    StoreImage { name: String, imagedata: String },
    /// Remove a custom pattern.
    RemoveImage { name: String },
    /// Add a delta to the stored correction of its wavelength.
    MergeCorrection(CorrectionPatternDeltas),
    /// Publish the acknowledgment of a correction for a wavelength.
    AcknowledgeCorrection { wavelength: u32 },
    /// Reboot the machine.
    Reboot,
}

/// Why a message was discarded.
#[derive(Debug, Clone, Copy, PartialEq, Eq)]
pub enum DispatchError {
    /// The message is none of those that the dispatcher handles.
    UnexpectedMessage,
}

/// A laser counts when it is switched on and is not the LED.
pub open spec fn qualifies(laser: LaserState) -> bool {
    laser.state != 0 && laser.name@ != "led"@
}

/// `i` is the laser that sets the wavelength: it counts, no laser that counts
/// is more intense, and every earlier one that counts is strictly less
/// intense.
pub open spec fn is_strongest(lasers: Seq<LaserState>, i: int) -> bool {
    &&& 0 <= i < lasers.len()
    &&& qualifies(lasers[i])
    &&& forall|j: int|
        0 <= j < lasers.len() && qualifies(#[trigger] lasers[j]) ==> lasers[j].intensity
            <= lasers[i].intensity
    &&& forall|j: int|
        0 <= j < i && qualifies(#[trigger] lasers[j]) ==> lasers[j].intensity
            < lasers[i].intensity
}

/// The laser that sets the wavelength, if any counts.
pub open spec fn strongest(lasers: Seq<LaserState>) -> Option<int> {
    if exists|i: int| is_strongest(lasers, i) {
        Some(choose|i: int| is_strongest(lasers, i))
    } else {
        None
    }
}

/// At most one laser sets the wavelength.
pub proof fn lemma_strongest_unique(lasers: Seq<LaserState>, i: int, j: int)
    requires
        is_strongest(lasers, i),
        is_strongest(lasers, j),
    ensures
        i == j,
{
    if i < j {
        assert(lasers[i].intensity < lasers[j].intensity);
    } else if j < i {
        assert(lasers[j].intensity < lasers[i].intensity);
    }
}

fn counts(laser: &LaserState) -> (yes: bool)
    ensures
        yes == qualifies(*laser),
{
    let led: String = String::from_str("led");
    laser.state != 0 && !(laser.name == led)
}

/// The index of the laser that sets the wavelength: among those switched on
/// and not the LED the most intense, the first of several equally intense.
pub fn strongest_laser(lasers: &Vec<LaserState>) -> (found: Option<usize>)
    ensures
        match found {
            Some(i) => strongest(lasers@) == Some(i as int),
            None => strongest(lasers@) is None,
        },
        found matches Some(i) ==> is_strongest(lasers@, i as int),
        found is None <==> forall|j: int| 0 <= j < lasers@.len() ==> !qualifies(lasers@[j]),
{
    let mut best: Option<usize> = None;
    let mut k: usize = 0;
    while k < lasers.len()
        invariant
            k <= lasers@.len(),
            best is None ==> forall|j: int| 0 <= j < k ==> !qualifies(#[trigger] lasers@[j]),
            best matches Some(b) ==> {
                &&& b < k
                &&& qualifies(lasers@[b as int])
                &&& forall|j: int|
                    0 <= j < k && qualifies(#[trigger] lasers@[j]) ==> lasers@[j].intensity
                        <= lasers@[b as int].intensity
                &&& forall|j: int|
                    0 <= j < b && qualifies(#[trigger] lasers@[j]) ==> lasers@[j].intensity
                        < lasers@[b as int].intensity
            },
        decreases lasers@.len() - k,
    {
        if counts(&lasers[k]) {
            match best {
                None => {
                    best = Some(k);
                },
                Some(b) => {
                    if lasers[k].intensity > lasers[b].intensity {
                        best = Some(k);
                    }
                },
            }
        }
        k += 1;
    }
    proof {
        match best {
            Some(b) => {
                assert(is_strongest(lasers@, b as int));
                let c = choose|c: int| is_strongest(lasers@, c);
                lemma_strongest_unique(lasers@, b as int, c);
            },
            None => {
                assert forall|i: int| !is_strongest(lasers@, i) by {
                    if 0 <= i < lasers@.len() {
                        assert(!qualifies(lasers@[i]));
                    }
                }
            },
        }
    }
    best
}

/// The three reports sent when the channel is established, and again when
/// the embedded peer has booted.
pub open spec fn greeting() -> Seq<Action> {
    seq![Action::RequestLasers, Action::ReportPatterns, Action::ReportState]
}

/// The state after an aim command.
pub open spec fn state_after_aim(state: State, command: AimCommand) -> State {
    match command {
        AimCommand::SetAim(aim) | AimCommand::PreStack(aim) => State {
            wavelength: state.wavelength,
            fresnel: aim.fresnel,
            pattern_params: aim.pattern,
        },
        AimCommand::SetFresnel { value } => State {
            wavelength: state.wavelength,
            fresnel: value,
            pattern_params: state.pattern_params,
        },
        AimCommand::SetPattern { pattern } => State {
            wavelength: state.wavelength,
            fresnel: state.fresnel,
            pattern_params: pattern,
        },
        _ => state,
    }
}

/// The steps that an aim command asks for.
pub open spec fn actions_of_aim(command: AimCommand) -> Seq<Action> {
    match command {
        AimCommand::Get => seq![Action::ReportState],
        AimCommand::GetAllPatterns => seq![Action::ReportPatterns],
        AimCommand::SetAim(_) => seq![Action::Present, Action::ReportState],
        AimCommand::PreStack(_) => seq![
            Action::Present,
            Action::ReportState,
            Action::AcknowledgePreStack,
        ],
        AimCommand::SetFresnel { .. } => seq![Action::Present, Action::ReportState],
        AimCommand::SetPattern { .. } => seq![Action::Present, Action::ReportState],
        AimCommand::UploadImage { name, imagedata } => seq![
            Action::StoreImage { name, imagedata },
            Action::ReportPatterns,
            Action::ReportState,
        ],
        AimCommand::DeleteImage { name } => seq![
            Action::RemoveImage { name },
            Action::ReportPatterns,
            Action::ReportState,
        ],
        AimCommand::SetCorrectionPatternDeltas(deltas) => seq![
            Action::MergeCorrection(deltas),
            Action::AcknowledgeCorrection { wavelength: deltas.wavelength },
        ],
        AimCommand::Reboot => seq![Action::Reboot],
        _ => Seq::<Action>::empty(),
    }
}

/// Whether the dispatcher handles the message: the boot notice of the
/// embedded peer, a laser report, or any aim command sent as a device
/// message.
pub open spec fn is_expected(message: Message) -> bool {
    match (message.m_type, message.data) {
        (MessageType::Status, MessageData::Embedded(EmbeddedCommand::InitDone)) => true,
        (MessageType::Device, MessageData::Lasers(LaserCommand::SetLasers { .. })) => true,
        (MessageType::Device, MessageData::Aim(_)) => true,
        _ => false,
    }
}

/// The state after a message. A message that is not handled changes nothing.
pub open spec fn state_after(state: State, message: Message) -> State {
    match (message.m_type, message.data) {
        (MessageType::Device, MessageData::Lasers(LaserCommand::SetLasers { lasers })) => {
            match strongest(lasers@) {
                Some(i) => State {
                    wavelength: lasers@[i].wavelength,
                    fresnel: state.fresnel,
                    pattern_params: state.pattern_params,
                },
                None => state,
            }
        },
        (MessageType::Device, MessageData::Aim(command)) => state_after_aim(state, command),
        _ => state,
    }
}

/// The steps that a handled message asks for.
pub open spec fn actions_of(message: Message) -> Seq<Action> {
    match (message.m_type, message.data) {
        (MessageType::Status, MessageData::Embedded(EmbeddedCommand::InitDone)) => greeting(),
        (MessageType::Device, MessageData::Lasers(LaserCommand::SetLasers { lasers })) => {
            if strongest(lasers@) is Some {
                seq![Action::Present, Action::ReportState]
            } else {
                Seq::<Action>::empty()
            }
        },
        (MessageType::Device, MessageData::Aim(command)) => actions_of_aim(command),
        _ => Seq::<Action>::empty(),
    }
}

/// The four inbound subtopics, in the order in which they are subscribed.
pub open spec fn inbound_subtopics() -> Seq<Seq<char>> {
    seq!["embedded/aim"@, "gui/aim"@, "calibration/aim"@, "embedded/lasers"@]
}

impl Context {
    /// A context for `config` and `state`. Everything is published on the
    /// subtopic `aim` of the root topic.
    pub fn new(config: Config, state: State) -> (context: Context)
        ensures
            context.config == config,
            context.state == state,
            context.main_topic_aim@ == config.microscope.serial_nr@ + "/"@ + "aim"@,
    {
        let main_topic_aim: String = config.main_topic().subtopic("aim");
        Context { config, state, main_topic_aim }
    }

    /// Replaces the parts of the state that are given and keeps the others.
    /// The caller then computes and presents the pattern.
    pub fn update_state(
        &mut self,
        pattern_params: Option<PatternParams>,
        fresnel: Option<u32>,
        wavelength: Option<u32>,
    )
        ensures
            final(self).config == old(self).config,
            final(self).main_topic_aim == old(self).main_topic_aim,
            final(self).state.pattern_params == (match pattern_params {
                Some(p) => p,
                None => old(self).state.pattern_params,
            }),
            final(self).state.fresnel == (match fresnel {
                Some(f) => f,
                None => old(self).state.fresnel,
            }),
            final(self).state.wavelength == (match wavelength {
                Some(w) => w,
                None => old(self).state.wavelength,
            }),
    {
        if let Some(p) = pattern_params {
            self.state.pattern_params = p;
        }
        if let Some(f) = fresnel {
            self.state.fresnel = f;
        }
        if let Some(w) = wavelength {
            self.state.wavelength = w;
        }
    }

    /// What to do once the channel is established: the topics to subscribe
    /// to, each the root topic, a slash and one of the four inbound
    /// subtopics, and then the three reports.
    pub fn on_connect(&self) -> (plan: (Vec<String>, Vec<Action>))
        ensures
            plan.0@.len() == 4,
            forall|i: int|
                0 <= i < 4 ==> (#[trigger] plan.0@[i])@ == self.config.microscope.serial_nr@ + "/"@
                    + inbound_subtopics()[i],
            plan.1@ == greeting(),
    {
        let root: &str = self.config.main_topic();
        let topics: Vec<String> = vec![
            root.subtopic("embedded/aim"),
            root.subtopic("gui/aim"),
            root.subtopic("calibration/aim"),
            root.subtopic("embedded/lasers"),
        ];
        let actions: Vec<Action> = vec![
            Action::RequestLasers,
            Action::ReportPatterns,
            Action::ReportState,
        ];
        (topics, actions)
    }

    /// Handles one inbound message: updates the state and returns the steps
    /// to carry out, or discards a message that is not handled and leaves
    /// the state as it was.
    pub fn process_message(&mut self, message: Message) -> (steps: Result<
        Vec<Action>,
        DispatchError,
    >)
        ensures
            final(self).config == old(self).config,
            final(self).main_topic_aim == old(self).main_topic_aim,
            final(self).state == state_after(old(self).state, message),
            is_expected(message) ==> (steps matches Ok(v) && v@ == actions_of(message)),
            !is_expected(message) ==> steps == Err::<Vec<Action>, DispatchError>(
                DispatchError::UnexpectedMessage,
            ),
    {
        match (message.m_type, message.data) {
            (MessageType::Status, MessageData::Embedded(EmbeddedCommand::InitDone)) => {
                Ok(vec![Action::RequestLasers, Action::ReportPatterns, Action::ReportState])
            },
            (MessageType::Device, MessageData::Lasers(LaserCommand::SetLasers { lasers })) => {
                match strongest_laser(&lasers) {
                    Some(i) => {
                        let wavelength: u32 = lasers[i].wavelength;
                        self.update_state(None, None, Some(wavelength));
                        Ok(vec![Action::Present, Action::ReportState])
                    },
                    None => Ok(Vec::new()),
                }
            },
            (MessageType::Device, MessageData::Aim(command)) => Ok(self.process_aim(command)),
            _ => Err(DispatchError::UnexpectedMessage),
        }
    }

    /// Handles one aim command.
    pub fn process_aim(&mut self, command: AimCommand) -> (steps: Vec<Action>)
        ensures
            final(self).config == old(self).config,
            final(self).main_topic_aim == old(self).main_topic_aim,
            final(self).state == state_after_aim(old(self).state, command),
            steps@ == actions_of_aim(command),
    {
        match command {
            AimCommand::SetAim(aim) => {
                self.update_state(Some(aim.pattern), Some(aim.fresnel), None);
                vec![Action::Present, Action::ReportState]
            },
            AimCommand::PreStack(aim) => {
                self.update_state(Some(aim.pattern), Some(aim.fresnel), None);
                vec![Action::Present, Action::ReportState, Action::AcknowledgePreStack]
            },
            AimCommand::Get => vec![Action::ReportState],
            AimCommand::GetAllPatterns => vec![Action::ReportPatterns],
            AimCommand::SetFresnel { value } => {
                self.update_state(None, Some(value), None);
                vec![Action::Present, Action::ReportState]
            },
            AimCommand::SetPattern { pattern } => {
                self.update_state(Some(pattern), None, None);
                vec![Action::Present, Action::ReportState]
            },
            AimCommand::UploadImage { name, imagedata } => {
                vec![Action::StoreImage { name, imagedata }, Action::ReportPatterns, Action::ReportState]
            },
            AimCommand::DeleteImage { name } => {
                vec![Action::RemoveImage { name }, Action::ReportPatterns, Action::ReportState]
            },
            AimCommand::SetCorrectionPatternDeltas(deltas) => {
                let wavelength: u32 = deltas.wavelength;
                vec![Action::MergeCorrection(deltas), Action::AcknowledgeCorrection { wavelength }]
            },
            AimCommand::Reboot => vec![Action::Reboot],
            _ => Vec::new(),
        }
    }
}

/// The request for the current laser state.
pub fn lasers_request() -> (message: Message)
    ensures
        message.m_type == MessageType::Device,
        message.data == MessageData::Lasers(LaserCommand::Get),
{
    Message { m_type: MessageType::Device, data: MessageData::Lasers(LaserCommand::Get) }
}

/// The report of the catalog.
pub fn patterns_report(patterns: AvailablePatterns) -> (message: Message)
    ensures
        message.m_type == MessageType::Device,
        message.data == MessageData::Aim(AimCommand::AvailablePatterns { patterns }),
{
    Message {
        m_type: MessageType::Device,
        data: MessageData::Aim(AimCommand::AvailablePatterns { patterns }),
    }
}

/// The acknowledgment of a pre-stack command.
pub fn prestack_done() -> (message: Message)
    ensures
        message.m_type == MessageType::Device,
        message.data matches MessageData::Aim(AimCommand::Response { reply }) && reply@
            == "PreStack done"@,
{
    let reply: String = String::from_str("PreStack done");
    Message { m_type: MessageType::Device, data: MessageData::Aim(AimCommand::Response { reply }) }
}

/// The acknowledgment of a correction for a wavelength.
pub fn correction_done(wavelength: u32) -> (message: Message)
    ensures
        message.m_type == MessageType::Device,
        message.data == MessageData::Aim(
            AimCommand::SetCorrectionPatternDeltasResponse { wavelength, success: true },
        ),
{
    Message {
        m_type: MessageType::Device,
        data: MessageData::Aim(
            AimCommand::SetCorrectionPatternDeltasResponse { wavelength, success: true },
        ),
    }
}

/// The report of the device state: the wavelength, the power of the lens
/// and the chosen pattern.
pub fn state_report(state: State) -> (message: Message)
    ensures
        message.m_type == MessageType::Device,
        message.data == MessageData::Aim(
            AimCommand::CurrentState {
                wavelength: state.wavelength,
                fresnel: state.fresnel,
                pattern: state.pattern_params,
            },
        ),
{
    Message {
        m_type: MessageType::Device,
        data: MessageData::Aim(
            AimCommand::CurrentState {
                wavelength: state.wavelength,
                fresnel: state.fresnel,
                pattern: state.pattern_params,
            },
        ),
    }
}

/// The announcement that the broker publishes when the connection is lost.
pub fn last_will_message() -> (message: Message)
    ensures
        message.m_type == MessageType::Device,
        message.data == MessageData::Aim(AimCommand::Disconnect),
{
    Message { m_type: MessageType::Device, data: MessageData::Aim(AimCommand::Disconnect) }
}

/// The state that the device starts in: the defaults of the configuration.
pub fn initialize_state(defaults: DefaultState) -> (state: State)
    ensures
        state.wavelength == defaults.wavelength,
        state.fresnel == defaults.fresnel,
        state.pattern_params == defaults.pattern,
{
    State {
        wavelength: defaults.wavelength,
        fresnel: defaults.fresnel,
        pattern_params: defaults.pattern,
    }
}

} // verus!
