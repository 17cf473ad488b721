//! Which element, vertex and boundary the simulation page plots over time,
//! and what the engine is told when the user picks or discards one.
//!
//! The page only tells a running engine; once the engine has stopped, a new
//! pick is remembered without a command.
use vstd::prelude::*;

verus! {

/// A command for the engine's time-series recording.
#[derive(Debug, Clone, Copy, PartialEq, Eq, Structural)]
pub enum EngineCommand {
    RecordStressData(usize),
    StopRecordingStressData(usize),
    RecordVertexPosition(usize),
    StopRecordingVertexPosition(usize),
    RecordBoundaryData(u64),
    StopRecordingBoundaryData,
}

/// What the page currently plots over time.
#[derive(Debug, Clone, Copy, PartialEq, Eq, Structural)]
pub struct Selection {
    /// The element whose stress is plotted.
    pub element: Option<usize>,
    /// The vertex whose displacement is plotted.
    pub vertex: Option<usize>,
    /// The boundary whose average is plotted.
    pub boundary: Option<u64>,
}

/// The selection and commands after the user picks element `index`.
pub open spec fn after_stress_pick(s: Selection, index: usize, alive: bool) -> (Selection, Seq<EngineCommand>) {
    if s.element == Some(index) {
        (s, Seq::empty())
    } else {
        let stop = match s.element {
            Some(old) if alive => seq![EngineCommand::StopRecordingStressData(old)],
            _ => Seq::empty(),
        };
        let start = if alive {
            seq![EngineCommand::RecordStressData(index)]
        } else {
            Seq::empty()
        };
        (Selection { element: Some(index), ..s }, stop + start)
    }
}

/// The selection and commands after the stress plot is discarded.
pub open spec fn after_stress_discard(s: Selection, alive: bool) -> (Selection, Seq<EngineCommand>) {
    let stop = match s.element {
        Some(old) if alive => seq![EngineCommand::StopRecordingStressData(old)],
        _ => Seq::empty(),
    };
    (Selection { element: None, ..s }, stop)
}

/// The selection and commands after the user picks vertex `index`.
pub open spec fn after_vertex_pick(s: Selection, index: usize, alive: bool) -> (Selection, Seq<EngineCommand>) {
    if s.vertex == Some(index) {
        (s, Seq::empty())
    } else {
        let stop = match s.vertex {
            Some(old) if alive => seq![EngineCommand::StopRecordingVertexPosition(old)],
            _ => Seq::empty(),
        };
        let start = if alive {
            seq![EngineCommand::RecordVertexPosition(index)]
        } else {
            Seq::empty()
        };
        (Selection { vertex: Some(index), ..s }, stop + start)
    }
}

/// The selection and commands after the displacement plot is discarded.
pub open spec fn after_vertex_discard(s: Selection, alive: bool) -> (Selection, Seq<EngineCommand>) {
    let stop = match s.vertex {
        Some(old) if alive => seq![EngineCommand::StopRecordingVertexPosition(old)],
        _ => Seq::empty(),
    };
    (Selection { vertex: None, ..s }, stop)
}

/// The selection and commands after the user picks boundary `id` in the
/// plot dialog.
pub open spec fn after_boundary_pick(s: Selection, id: u64, alive: bool) -> (Selection, Seq<EngineCommand>) {
    if s.boundary == Some(id) {
        (s, Seq::empty())
    } else {
        let start = if alive {
            seq![EngineCommand::RecordBoundaryData(id)]
        } else {
            Seq::empty()
        };
        (Selection { boundary: Some(id), ..s }, start)
    }
}

/// The elements whose stress an engine records, after it has carried out
/// `commands` starting from `recorded`.
pub open spec fn recorded_elements(recorded: Set<usize>, commands: Seq<EngineCommand>) -> Set<usize>
    decreases commands.len(),
{
    if commands.len() == 0 {
        recorded
    } else {
        let rest = recorded_elements(recorded, commands.drop_last());
        match commands.last() {
            EngineCommand::RecordStressData(i) => rest.insert(i),
            EngineCommand::StopRecordingStressData(i) => rest.remove(i),
            _ => rest,
        }
    }
}

/// The set holding the selected item, if there is one.
pub open spec fn held<T>(o: Option<T>) -> Set<T> {
    match o {
        Some(x) => set![x],
        None => Set::empty(),
    }
}

impl Selection {
    /// Nothing selected.
    pub fn new() -> (s: Self)
        ensures
            s.element is None,
            s.vertex is None,
            s.boundary is None,
    {
        Selection { element: None, vertex: None, boundary: None }
    }

    /// The user picked element `index` for the stress plot: the engine, if
    /// it runs, stops recording the element picked before and starts on the
    /// new one. Picking the plotted element again does nothing.
    pub fn record_stress_data(&mut self, index: usize, engine_alive: bool) -> (commands: Vec<EngineCommand>)
        ensures
            (*final(self), commands@) == after_stress_pick(*old(self), index, engine_alive),
    {
        let mut commands: Vec<EngineCommand> = Vec::new();
        if self.element == Some(index) {
            return commands;
        }
        if let Some(old) = self.element {
            if engine_alive {
                commands.push(EngineCommand::StopRecordingStressData(old));
            }
        }
        if engine_alive {
            commands.push(EngineCommand::RecordStressData(index));
        }
        self.element = Some(index);
        assert(commands@ =~= after_stress_pick(*old(self), index, engine_alive).1);
        commands
    }

    /// The stress plot is discarded.
    pub fn stop_recording_stress_data(&mut self, engine_alive: bool) -> (command: Option<EngineCommand>)
        ensures
            *final(self) == after_stress_discard(*old(self), engine_alive).0,
            match command {
                Some(c) => after_stress_discard(*old(self), engine_alive).1 == seq![c],
                None => after_stress_discard(*old(self), engine_alive).1.len() == 0,
            },
    {
        let taken = self.element;
        self.element = None;
        match taken {
            Some(old) => if engine_alive {
                Some(EngineCommand::StopRecordingStressData(old))
            } else {
                None
            },
            None => None,
        }
    }

    /// The user picked vertex `index` for the displacement plot: the
    /// engine, if it runs, stops recording the vertex picked before and
    /// starts on the new one. Picking the plotted vertex again does nothing.
    pub fn record_vertex_position(&mut self, index: usize, engine_alive: bool) -> (commands: Vec<EngineCommand>)
        ensures
            (*final(self), commands@) == after_vertex_pick(*old(self), index, engine_alive),
    {
        let mut commands: Vec<EngineCommand> = Vec::new();
        if self.vertex == Some(index) {
            return commands;
        }
        if let Some(old) = self.vertex {
            if engine_alive {
                commands.push(EngineCommand::StopRecordingVertexPosition(old));
            }
        }
        if engine_alive {
            commands.push(EngineCommand::RecordVertexPosition(index));
        }
        self.vertex = Some(index);
        assert(commands@ =~= after_vertex_pick(*old(self), index, engine_alive).1);
        commands
    }

    /// The displacement plot is discarded.
    pub fn stop_recording_vertex_position(&mut self, engine_alive: bool) -> (command: Option<EngineCommand>)
        ensures
            *final(self) == after_vertex_discard(*old(self), engine_alive).0,
            match command {
                Some(c) => after_vertex_discard(*old(self), engine_alive).1 == seq![c],
                None => after_vertex_discard(*old(self), engine_alive).1.len() == 0,
            },
    {
        let taken = self.vertex;
        self.vertex = None;
        match taken {
            Some(old) => if engine_alive {
                Some(EngineCommand::StopRecordingVertexPosition(old))
            } else {
                None
            },
            None => None,
        }
    }

    /// The user picked boundary `id` in the plot dialog: a running engine
    /// starts recording its average, unless it is the boundary plotted
    /// already.
    pub fn select_boundary(&mut self, id: u64, engine_alive: bool) -> (command: Option<EngineCommand>)
        ensures
            *final(self) == after_boundary_pick(*old(self), id, engine_alive).0,
            match command {
                Some(c) => after_boundary_pick(*old(self), id, engine_alive).1 == seq![c],
                None => after_boundary_pick(*old(self), id, engine_alive).1.len() == 0,
            },
    {
        if self.boundary == Some(id) {
            return None;
        }
        self.boundary = Some(id);
        if engine_alive {
            Some(EngineCommand::RecordBoundaryData(id))
        } else {
            None
        }
    }

    /// The boundary average plot is discarded; the engine is told to stop
    /// recording it.
    pub fn discard_boundary(&mut self) -> (command: EngineCommand)
        ensures
            *final(self) == (Selection { boundary: None, ..*old(self) }),
            command == EngineCommand::StopRecordingBoundaryData,
    {
        self.boundary = None;
        EngineCommand::StopRecordingBoundaryData
    }
}

/// Picking the element that is already plotted changes nothing and sends
/// nothing.
pub proof fn law_repeated_pick_is_quiet(s: Selection, index: usize, alive: bool)
    ensures
        after_stress_pick(after_stress_pick(s, index, alive).0, index, alive) == (
        after_stress_pick(s, index, alive).0,
        Seq::<EngineCommand>::empty(),
        ),
        after_vertex_pick(after_vertex_pick(s, index, alive).0, index, alive) == (
        after_vertex_pick(s, index, alive).0,
        Seq::<EngineCommand>::empty(),
        ),
{
}

/// While the engine runs, the commands keep the set of elements it records
/// equal to the element the page plots: after a pick or a discard, the
/// engine records exactly the selected element, if any.
pub proof fn law_engine_records_the_selection(s: Selection, index: usize)
    ensures
        recorded_elements(held(s.element), after_stress_pick(s, index, true).1) =~= held(
            after_stress_pick(s, index, true).0.element,
        ),
        recorded_elements(held(s.element), after_stress_discard(s, true).1) =~= held(
            after_stress_discard(s, true).0.element,
        ),
{
    reveal_with_fuel(recorded_elements, 3);
    let c = after_stress_pick(s, index, true).1;
    if s.element != Some(index) {
        match s.element {
            Some(old) => {
                assert(c.drop_last() =~= seq![EngineCommand::StopRecordingStressData(old)]);
                assert(c.drop_last().drop_last() =~= Seq::<EngineCommand>::empty());
                assert(recorded_elements(held(s.element), c.drop_last()) =~= Set::<usize>::empty());
            },
            None => {
                assert(c.drop_last() =~= Seq::<EngineCommand>::empty());
            },
        }
        assert(recorded_elements(held(s.element), c) =~= set![index]);
    }
    let d = after_stress_discard(s, true).1;
    if s.element is Some {
        assert(d.drop_last() =~= Seq::<EngineCommand>::empty());
    }
    assert(recorded_elements(held(s.element), d) =~= Set::<usize>::empty());
}

/// A discarded plot stays discarded: discarding again sends nothing.
pub proof fn law_discard_twice_is_quiet(s: Selection, alive: bool)
    ensures
        after_stress_discard(after_stress_discard(s, alive).0, alive).1.len() == 0,
        after_vertex_discard(after_vertex_discard(s, alive).0, alive).1.len() == 0,
{
}

/// Picking a boundary always selects it, leaves the element and vertex
/// plots alone, and tells a running engine to record it exactly when it is
/// not the boundary plotted already; a stopped engine is told nothing.
pub proof fn law_boundary_pick_selects_it(s: Selection, id: u64, alive: bool)
    ensures
        after_boundary_pick(s, id, alive).0.boundary == Some(id),
        after_boundary_pick(s, id, alive).0.element == s.element,
        after_boundary_pick(s, id, alive).0.vertex == s.vertex,
        after_boundary_pick(s, id, alive).1 == if alive && s.boundary != Some(id) {
            seq![EngineCommand::RecordBoundaryData(id)]
        } else {
            Seq::<EngineCommand>::empty()
        },
{
}

/// Picking an element or a vertex always selects it and leaves the other
/// plots alone; a running engine is told to stop the element (vertex)
/// plotted before, if it was another one, and then to record the new one.
pub proof fn law_pick_selects_it(s: Selection, index: usize, alive: bool)
    ensures
        after_stress_pick(s, index, alive).0 == (Selection { element: Some(index), ..s }),
        after_vertex_pick(s, index, alive).0 == (Selection { vertex: Some(index), ..s }),
        after_stress_pick(s, index, alive).1 == if !alive || s.element == Some(index) {
            Seq::<EngineCommand>::empty()
        } else if s.element is Some {
            seq![
                EngineCommand::StopRecordingStressData(s.element->0),
                EngineCommand::RecordStressData(index),
            ]
        } else {
            seq![EngineCommand::RecordStressData(index)]
        },
        after_vertex_pick(s, index, alive).1 == if !alive || s.vertex == Some(index) {
            Seq::<EngineCommand>::empty()
        } else if s.vertex is Some {
            seq![
                EngineCommand::StopRecordingVertexPosition(s.vertex->0),
                EngineCommand::RecordVertexPosition(index),
            ]
        } else {
            seq![EngineCommand::RecordVertexPosition(index)]
        },
{
    if alive && s.element != Some(index) {
        if s.element is Some {
            assert(after_stress_pick(s, index, alive).1 =~= seq![
                EngineCommand::StopRecordingStressData(s.element->0),
                EngineCommand::RecordStressData(index),
            ]);
        } else {
            assert(after_stress_pick(s, index, alive).1 =~= seq![EngineCommand::RecordStressData(index)]);
        }
    }
    if !alive && s.element != Some(index) {
        assert(after_stress_pick(s, index, alive).1 =~= Seq::<EngineCommand>::empty());
    }
    if alive && s.vertex != Some(index) {
        if s.vertex is Some {
            assert(after_vertex_pick(s, index, alive).1 =~= seq![
                EngineCommand::StopRecordingVertexPosition(s.vertex->0),
                EngineCommand::RecordVertexPosition(index),
            ]);
        } else {
            assert(after_vertex_pick(s, index, alive).1 =~= seq![EngineCommand::RecordVertexPosition(index)]);
        }
    }
    if !alive && s.vertex != Some(index) {
        assert(after_vertex_pick(s, index, alive).1 =~= Seq::<EngineCommand>::empty());
    }
}

/// Discarding a plot clears its selection and leaves the other plots
/// alone; a running engine is told to stop recording what was plotted, if
/// anything was, and a stopped engine is told nothing.
pub proof fn law_discard_clears_it(s: Selection, alive: bool)
    ensures
        after_stress_discard(s, alive).0 == (Selection { element: None, ..s }),
        after_vertex_discard(s, alive).0 == (Selection { vertex: None, ..s }),
        after_stress_discard(s, alive).1 == if alive && s.element is Some {
            seq![EngineCommand::StopRecordingStressData(s.element->0)]
        } else {
            Seq::<EngineCommand>::empty()
        },
        after_vertex_discard(s, alive).1 == if alive && s.vertex is Some {
            seq![EngineCommand::StopRecordingVertexPosition(s.vertex->0)]
        } else {
            Seq::<EngineCommand>::empty()
        },
{
}

} // verus!
