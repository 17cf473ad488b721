# dpm_sim

The decision logic of a particle-dynamics simulator with a graphical
interface, as a library whose behaviour is stated in contracts and proved
with Verus.

- `src/` is the verified library. Each module states its contracts over
  spec functions and proves the laws that relate its operations:
  - `triangulation_2`, `triangulation`: triangulation data, and keeping a
    subset of triangles with renumbered vertices, rebuilt incidence lists and
    sorted edges.
  - `boundary_condition`: combining boundary conditions on a node.
  - `boundary_membership`, `containment`: which points lie on which
    boundaries, both ways; point-in-solid parity.
  - `run_state`: the counters of a run, the adaptive time step, importing a
    saved run.
  - `recording`, `mesh_worker`, `hardware`: the state machines behind the
    time-series plots, the meshing worker and hardware detection.
  - `export`, `inputs`, `text`: export file names and headers, the dialogs'
    whole-number inputs, decimal parsing and printing.
  - `lock`, `project_list`, `face_plane`, `display_names`, `material`: the
    reentrant geometry lock, the project panel, and names shown to the user.
- `tests/` runs the library on concrete values.
- `app/` is the program around it: running the hardware probes, and the
  floating-point geometry, colour mapping and integration.
