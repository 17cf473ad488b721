//! The decisions of the background worker that turns the drawn shapes into
//! a mesh.
//!
//! The worker waits for a command; for an input it builds the solid from the
//! shapes, meshes it if it has vertices and otherwise meshes the first
//! polygon, and answers with the mesh or with an error. The building,
//! meshing and sending are done by the caller; this module says, from the
//! stage the worker is in and the outcome of the last thing done, what comes
//! next.
use vstd::prelude::*;

verus! {

/// Where the worker is.
#[derive(Debug, Clone, Copy, PartialEq, Eq, Structural)]
pub enum WorkerStage {
    AwaitingCommand,
    BuildingPolyhedronSet,
    GeneratingFromPolyhedronSet,
    BuildingPolygonSet,
    GeneratingFromPolygon,
    SendingMesh,
    SendingError,
    Stopped,
}

/// The outcome of what the worker was told to do last.
#[derive(Debug, Clone, Copy, PartialEq, Eq, Structural)]
pub enum WorkerEvent {
    /// A new refresh token arrived.
    TokenReceived,
    /// Shapes to mesh arrived.
    InputReceived,
    /// The command channel was closed.
    ChannelClosed,
    /// The solid was built; it has this many vertices.
    PolyhedronSetBuilt { vertex_count: usize },
    /// The shapes do not make a valid solid.
    PolyhedronSetFailed,
    /// The polygon set was built, with this many polygons, from this many
    /// inputs, the first of which is a join of a primitive shape or not.
    PolygonSetBuilt { polygon_count: usize, input_count: usize, first_is_join: bool },
    /// The shapes do not make a valid polygon set.
    PolygonSetFailed,
    /// Meshing succeeded.
    MeshGenerated,
    /// Meshing failed.
    MeshFailed,
    /// The message was delivered.
    Delivered,
    /// The receiver is gone.
    NotDelivered,
}

/// Which error the worker reports.
#[derive(Debug, Clone, Copy, PartialEq, Eq, Structural)]
pub enum WorkerError {
    /// The error of building the solid.
    InvalidPolyhedronSet,
    /// The error of building the polygon set.
    InvalidPolygonSet,
    /// No polygon to mesh.
    NoPolygons,
    /// The error of meshing.
    Meshing,
}

/// What the worker does next.
#[derive(Debug, Clone, Copy, PartialEq, Eq, Structural)]
pub enum WorkerAction {
    /// Keep the new refresh token and wait for the next command.
    StoreToken,
    BuildPolyhedronSet,
    GenerateFromPolyhedronSet,
    BuildPolygonSet,
    /// Mesh the first polygon; with its primitive shape where the input is
    /// a single join of one.
    GenerateFromPolygon { with_primitive: bool },
    SendMesh,
    SendError(WorkerError),
    /// Ask the interface to redraw, then wait for the next command.
    RefreshAndAwait,
    /// Leave the loop.
    Exit,
}

/// Whether `e` answers what the worker in stage `s` was doing.
pub open spec fn expects(s: WorkerStage, e: WorkerEvent) -> bool {
    match s {
        WorkerStage::AwaitingCommand => e is TokenReceived || e is InputReceived || e is ChannelClosed,
        WorkerStage::BuildingPolyhedronSet => e is PolyhedronSetBuilt || e is PolyhedronSetFailed,
        WorkerStage::GeneratingFromPolyhedronSet => e is MeshGenerated || e is MeshFailed,
        WorkerStage::BuildingPolygonSet => e is PolygonSetBuilt || e is PolygonSetFailed,
        WorkerStage::GeneratingFromPolygon => e is MeshGenerated || e is MeshFailed,
        WorkerStage::SendingMesh => e is Delivered || e is NotDelivered,
        WorkerStage::SendingError => e is Delivered || e is NotDelivered,
        WorkerStage::Stopped => false,
    }
}

/// The next stage and action.
pub open spec fn next(s: WorkerStage, e: WorkerEvent) -> (WorkerStage, WorkerAction) {
    match (s, e) {
        (WorkerStage::AwaitingCommand, WorkerEvent::TokenReceived) => (
            WorkerStage::AwaitingCommand,
            WorkerAction::StoreToken,
        ),
        (WorkerStage::AwaitingCommand, WorkerEvent::InputReceived) => (
            WorkerStage::BuildingPolyhedronSet,
            WorkerAction::BuildPolyhedronSet,
        ),
        (WorkerStage::BuildingPolyhedronSet, WorkerEvent::PolyhedronSetBuilt { vertex_count }) => {
            if vertex_count > 0 {
                (WorkerStage::GeneratingFromPolyhedronSet, WorkerAction::GenerateFromPolyhedronSet)
            } else {
                (WorkerStage::BuildingPolygonSet, WorkerAction::BuildPolygonSet)
            }
        },
        (WorkerStage::BuildingPolyhedronSet, WorkerEvent::PolyhedronSetFailed) => (
            WorkerStage::SendingError,
            WorkerAction::SendError(WorkerError::InvalidPolyhedronSet),
        ),
        (WorkerStage::BuildingPolygonSet, WorkerEvent::PolygonSetBuilt { polygon_count, input_count, first_is_join }) => {
            if polygon_count == 0 {
                (WorkerStage::SendingError, WorkerAction::SendError(WorkerError::NoPolygons))
            } else {
                (
                    WorkerStage::GeneratingFromPolygon,
                    WorkerAction::GenerateFromPolygon { with_primitive: input_count == 1 && first_is_join },
                )
            }
        },
        (WorkerStage::BuildingPolygonSet, WorkerEvent::PolygonSetFailed) => (
            WorkerStage::SendingError,
            WorkerAction::SendError(WorkerError::InvalidPolygonSet),
        ),
        (_, WorkerEvent::MeshGenerated) => (WorkerStage::SendingMesh, WorkerAction::SendMesh),
        (_, WorkerEvent::MeshFailed) => (WorkerStage::SendingError, WorkerAction::SendError(WorkerError::Meshing)),
        (_, WorkerEvent::Delivered) => (WorkerStage::AwaitingCommand, WorkerAction::RefreshAndAwait),
        _ => (WorkerStage::Stopped, WorkerAction::Exit),
    }
}

impl WorkerStage {
    /// Whether `event` answers what the worker in this stage was doing.
    pub fn accepts(&self, event: WorkerEvent) -> (b: bool)
        ensures
            b == expects(*self, event),
    {
        match self {
            WorkerStage::AwaitingCommand => match event {
                WorkerEvent::TokenReceived | WorkerEvent::InputReceived | WorkerEvent::ChannelClosed => true,
                _ => false,
            },
            WorkerStage::BuildingPolyhedronSet => match event {
                WorkerEvent::PolyhedronSetBuilt { .. } | WorkerEvent::PolyhedronSetFailed => true,
                _ => false,
            },
            WorkerStage::GeneratingFromPolyhedronSet | WorkerStage::GeneratingFromPolygon => match event {
                WorkerEvent::MeshGenerated | WorkerEvent::MeshFailed => true,
                _ => false,
            },
            WorkerStage::BuildingPolygonSet => match event {
                WorkerEvent::PolygonSetBuilt { .. } | WorkerEvent::PolygonSetFailed => true,
                _ => false,
            },
            WorkerStage::SendingMesh | WorkerStage::SendingError => match event {
                WorkerEvent::Delivered | WorkerEvent::NotDelivered => true,
                _ => false,
            },
            WorkerStage::Stopped => false,
        }
    }

    /// The stage the worker moves to on `event`, and what it does.
    pub fn step(&self, event: WorkerEvent) -> (r: (WorkerStage, WorkerAction))
        requires
            expects(*self, event),
        ensures
            r == next(*self, event),
    {
        match (*self, event) {
            (WorkerStage::AwaitingCommand, WorkerEvent::TokenReceived) => (
                WorkerStage::AwaitingCommand,
                WorkerAction::StoreToken,
            ),
            (WorkerStage::AwaitingCommand, WorkerEvent::InputReceived) => (
                WorkerStage::BuildingPolyhedronSet,
                WorkerAction::BuildPolyhedronSet,
            ),
            (WorkerStage::BuildingPolyhedronSet, WorkerEvent::PolyhedronSetBuilt { vertex_count }) => {
                if vertex_count > 0 {
                    (WorkerStage::GeneratingFromPolyhedronSet, WorkerAction::GenerateFromPolyhedronSet)
                } else {
                    (WorkerStage::BuildingPolygonSet, WorkerAction::BuildPolygonSet)
                }
            },
            (WorkerStage::BuildingPolyhedronSet, WorkerEvent::PolyhedronSetFailed) => (
                WorkerStage::SendingError,
                WorkerAction::SendError(WorkerError::InvalidPolyhedronSet),
            ),
            (
                WorkerStage::BuildingPolygonSet,
                WorkerEvent::PolygonSetBuilt { polygon_count, input_count, first_is_join },
            ) => {
                if polygon_count == 0 {
                    (WorkerStage::SendingError, WorkerAction::SendError(WorkerError::NoPolygons))
                } else {
                    (
                        WorkerStage::GeneratingFromPolygon,
                        WorkerAction::GenerateFromPolygon { with_primitive: input_count == 1 && first_is_join },
                    )
                }
            },
            (WorkerStage::BuildingPolygonSet, WorkerEvent::PolygonSetFailed) => (
                WorkerStage::SendingError,
                WorkerAction::SendError(WorkerError::InvalidPolygonSet),
            ),
            (_, WorkerEvent::MeshGenerated) => (WorkerStage::SendingMesh, WorkerAction::SendMesh),
            (_, WorkerEvent::MeshFailed) => (
                WorkerStage::SendingError,
                WorkerAction::SendError(WorkerError::Meshing),
            ),
            (_, WorkerEvent::Delivered) => (WorkerStage::AwaitingCommand, WorkerAction::RefreshAndAwait),
            _ => (WorkerStage::Stopped, WorkerAction::Exit),
        }
    }
}

/// The message sent when there is no polygon to mesh.
pub fn no_polygons_message() -> (s: String)
    ensures
        s@
            == "No polygons found in the current configuration. Please ensure you have drawn at least one shape."@,
{
    String::from_str(
        "No polygons found in the current configuration. Please ensure you have drawn at least one shape.",
    )
}

/// The generator hands the worker its refresh token once: the first call
/// sends it, later calls do nothing.
pub fn set_refresh_token(token_set: &mut bool) -> (send: bool)
    ensures
        send == !*old(token_set),
        *final(token_set),
{
    if *token_set {
        return false;
    }
    *token_set = true;
    true
}

/// Whether an action answers the input: the mesh or an error.
pub open spec fn is_answer(a: WorkerAction) -> bool {
    a is SendMesh || a is SendError
}

/// Whether the worker is between commands or has left its loop.
pub open spec fn is_idle(s: WorkerStage) -> bool {
    s is AwaitingCommand || s is Stopped
}

/// Whether `events` answer, one after the other, what the worker in stage
/// `s` does while it handles one input.
pub open spec fn valid_run(s: WorkerStage, events: Seq<WorkerEvent>) -> bool
    decreases events.len(),
{
    events.len() == 0 || (expects(s, events[0]) && (events.len() == 1 || (!is_idle(next(s, events[0]).0)
        && valid_run(next(s, events[0]).0, events.drop_first()))))
}

/// The stage after `events`.
pub open spec fn stage_after(s: WorkerStage, events: Seq<WorkerEvent>) -> WorkerStage
    decreases events.len(),
{
    if events.len() == 0 {
        s
    } else {
        stage_after(next(s, events[0]).0, events.drop_first())
    }
}

/// How many answers the worker sends on `events`.
pub open spec fn answers_on(s: WorkerStage, events: Seq<WorkerEvent>) -> nat
    decreases events.len(),
{
    if events.len() == 0 {
        0
    } else {
        (if is_answer(next(s, events[0]).1) {
            1nat
        } else {
            0nat
        }) + answers_on(next(s, events[0]).0, events.drop_first())
    }
}

/// How many answers a worker in stage `s` still owes for its input.
pub open spec fn owed(s: WorkerStage) -> nat {
    match s {
        WorkerStage::BuildingPolyhedronSet
        | WorkerStage::GeneratingFromPolyhedronSet
        | WorkerStage::BuildingPolygonSet
        | WorkerStage::GeneratingFromPolygon => 1,
        _ => 0,
    }
}

proof fn lemma_answers_match_owed(s: WorkerStage, events: Seq<WorkerEvent>)
    requires
        !is_idle(s),
        valid_run(s, events),
        stage_after(s, events) is AwaitingCommand,
    ensures
        answers_on(s, events) == owed(s),
    decreases events.len(),
{
    if events.len() > 0 {
        let t = next(s, events[0]).0;
        if events.len() > 1 {
            lemma_answers_match_owed(t, events.drop_first());
        } else {
            assert(events.drop_first().len() == 0);
            reveal_with_fuel(stage_after, 2);
            reveal_with_fuel(answers_on, 2);
        }
    }
}

/// Once an input has arrived, the worker sends exactly one answer, the mesh
/// or an error, before it waits for the next command.
pub proof fn law_one_answer_per_input(events: Seq<WorkerEvent>)
    requires
        valid_run(WorkerStage::BuildingPolyhedronSet, events),
        stage_after(WorkerStage::BuildingPolyhedronSet, events) is AwaitingCommand,
    ensures
        answers_on(WorkerStage::BuildingPolyhedronSet, events) == 1,
{
    lemma_answers_match_owed(WorkerStage::BuildingPolyhedronSet, events);
}

/// The worker leaves its loop only when the command channel is closed or
/// an answer cannot be delivered.
pub proof fn law_stops_only_when_cut_off(s: WorkerStage, e: WorkerEvent)
    requires
        expects(s, e),
        next(s, e).0 is Stopped,
    ensures
        e is ChannelClosed || e is NotDelivered,
{
}

/// Once the polygon set is built, an empty one is reported as having no
/// polygons; otherwise the worker meshes the first polygon, with the
/// primitive shape exactly when the input is a single join, whatever the
/// number of polygons.
pub proof fn law_primitive_only_for_a_single_join(polygon_count: usize, input_count: usize, first_is_join: bool)
    ensures
        ({
            let r = next(
                WorkerStage::BuildingPolygonSet,
                WorkerEvent::PolygonSetBuilt { polygon_count, input_count, first_is_join },
            );
            if polygon_count == 0 {
                r == (WorkerStage::SendingError, WorkerAction::SendError(WorkerError::NoPolygons))
            } else {
                &&& r.0 == WorkerStage::GeneratingFromPolygon
                &&& r.1 matches WorkerAction::GenerateFromPolygon { with_primitive } && (with_primitive <==> (
                input_count == 1 && first_is_join))
            }
        }),
{
}

/// The solid is meshed when it has vertices, and the polygon set is built
/// when it has none; a failure to build either is reported as an error.
pub proof fn law_solid_first(vertex_count: usize)
    ensures
        next(WorkerStage::BuildingPolyhedronSet, WorkerEvent::PolyhedronSetBuilt { vertex_count }) == if vertex_count
            > 0 {
            (WorkerStage::GeneratingFromPolyhedronSet, WorkerAction::GenerateFromPolyhedronSet)
        } else {
            (WorkerStage::BuildingPolygonSet, WorkerAction::BuildPolygonSet)
        },
        next(WorkerStage::BuildingPolyhedronSet, WorkerEvent::PolyhedronSetFailed).1 == WorkerAction::SendError(
            WorkerError::InvalidPolyhedronSet,
        ),
        next(WorkerStage::BuildingPolygonSet, WorkerEvent::PolygonSetFailed).1 == WorkerAction::SendError(
            WorkerError::InvalidPolygonSet,
        ),
{
}

} // verus!
