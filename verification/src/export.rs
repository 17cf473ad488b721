//! What an export writes and where: the formats, the stress components that
//! can be chosen, the header and the fields of the stress table, and the
//! names of the files of one time step.
use vstd::prelude::*;
use crate::text::{decimal_text, push_decimal};

verus! {

/// The file format of exported simulation data.
#[derive(Debug, Clone, Copy, PartialEq, Eq, Structural)]
pub enum ExportFormat {
    Csv,
    Pot,
}

impl Default for ExportFormat {
    fn default() -> (f: Self)
        ensures
            f == ExportFormat::Csv,
    {
        ExportFormat::Csv
    }
}

impl ExportFormat {
    /// The format's name as the user sees it.
    pub fn name(&self) -> (s: &'static str)
        ensures
            s@ == match *self {
                ExportFormat::Csv => "Csv"@,
                ExportFormat::Pot => "Pot"@,
            },
    {
        match self {
            ExportFormat::Csv => "Csv",
            ExportFormat::Pot => "Pot",
        }
    }
}

/// A component of a 3x3 stress tensor, row first.
#[derive(Debug, Clone, Copy, PartialEq, Eq, Structural)]
pub enum Component {
    XX,
    XY,
    XZ,
    YX,
    YY,
    YZ,
    ZX,
    ZY,
    ZZ,
}

/// The number of components of a stress tensor.
pub const COMPONENT_COUNT: usize = 9;

/// The component at position `i` in row-first order.
pub open spec fn component_at(i: int) -> Component {
    if i == 0 {
        Component::XX
    } else if i == 1 {
        Component::XY
    } else if i == 2 {
        Component::XZ
    } else if i == 3 {
        Component::YX
    } else if i == 4 {
        Component::YY
    } else if i == 5 {
        Component::YZ
    } else if i == 6 {
        Component::ZX
    } else if i == 7 {
        Component::ZY
    } else {
        Component::ZZ
    }
}

/// The two-letter name of a component.
pub open spec fn component_name(c: Component) -> Seq<char> {
    match c {
        Component::XX => "XX"@,
        Component::XY => "XY"@,
        Component::XZ => "XZ"@,
        Component::YX => "YX"@,
        Component::YY => "YY"@,
        Component::YZ => "YZ"@,
        Component::ZX => "ZX"@,
        Component::ZY => "ZY"@,
        Component::ZZ => "ZZ"@,
    }
}

impl Component {
    /// The component at position `i` in row-first order.
    pub fn at(i: usize) -> (c: Component)
        requires
            i < COMPONENT_COUNT,
        ensures
            c == component_at(i as int),
    {
        if i == 0 {
            Component::XX
        } else if i == 1 {
            Component::XY
        } else if i == 2 {
            Component::XZ
        } else if i == 3 {
            Component::YX
        } else if i == 4 {
            Component::YY
        } else if i == 5 {
            Component::YZ
        } else if i == 6 {
            Component::ZX
        } else if i == 7 {
            Component::ZY
        } else {
            Component::ZZ
        }
    }

    /// The two-letter name of the component, such as `XY`.
    pub fn name(&self) -> (s: &'static str)
        ensures
            s@ == component_name(*self),
    {
        match self {
            Component::XX => "XX",
            Component::XY => "XY",
            Component::XZ => "XZ",
            Component::YX => "YX",
            Component::YY => "YY",
            Component::YZ => "YZ",
            Component::ZX => "ZX",
            Component::ZY => "ZY",
            Component::ZZ => "ZZ",
        }
    }
}

/// The items of `items` whose flag in `chosen` is set, in their order.
pub open spec fn selected<T>(items: Seq<T>, chosen: Seq<bool>) -> Seq<T>
    decreases items.len(),
{
    if items.len() == 0 || chosen.len() < items.len() {
        Seq::empty()
    } else {
        let n = (items.len() - 1) as int;
        let before = selected(items.take(n), chosen);
        if chosen[n] {
            before.push(items[n])
        } else {
            before
        }
    }
}

/// All components in row-first order.
pub open spec fn all_components() -> Seq<Component> {
    Seq::new(9, |i: int| component_at(i))
}

/// The header of a stress column: `E` and the component's name.
pub open spec fn column_name(c: Component) -> Seq<char> {
    "E"@ + component_name(c)
}

/// The header of the stress table: one column per chosen component, in
/// row-first order, then the `Broken` column.
pub open spec fn stress_header_of(chosen: Seq<bool>) -> Seq<Seq<char>> {
    selected(all_components(), chosen).map_values(|c: Component| column_name(c)).push("Broken"@)
}

/// The values of the chosen components, in row-first order; with the names
/// of the components this gives the header, with one element's stresses
/// the fields of its row.
pub fn selected_values<T: Copy>(values: &[T; 9], chosen: &[bool; 9]) -> (r: Vec<T>)
    ensures
        r@ == selected(values@, chosen@),
{
    let mut r: Vec<T> = Vec::new();
    let mut i: usize = 0;
    while i < COMPONENT_COUNT
        invariant
            i <= 9,
            values@.len() == 9,
            chosen@.len() == 9,
            r@ == selected(values@.take(i as int), chosen@),
        decreases 9 - i,
    {
        proof {
            let t = values@.take(i as int + 1);
            assert(t.take(i as int) =~= values@.take(i as int));
            assert(t[i as int] == values@[i as int]);
        }
        if chosen[i] {
            r.push(values[i]);
        }
        i = i + 1;
    }
    assert(values@.take(9) =~= values@);
    r
}

/// The header row of the stress table, or `None` where no component was
/// chosen (then no stress table is written).
pub fn stress_header(chosen: &[bool; 9]) -> (r: Option<Vec<String>>)
    ensures
        r is None <==> selected(all_components(), chosen@).len() == 0,
        r matches Some(h) ==> h@.len() == stress_header_of(chosen@).len() && forall|i: int|
            0 <= i < h@.len() ==> #[trigger] h@[i]@ == stress_header_of(chosen@)[i],
{
    let all: [Component; 9] = [
        Component::XX,
        Component::XY,
        Component::XZ,
        Component::YX,
        Component::YY,
        Component::YZ,
        Component::ZX,
        Component::ZY,
        Component::ZZ,
    ];
    assert(all@ =~= all_components());
    let components = selected_values(&all, chosen);
    if components.len() == 0 {
        return None;
    }
    let ghost want = stress_header_of(chosen@);
    let mut header: Vec<String> = Vec::new();
    let mut i: usize = 0;
    while i < components.len()
        invariant
            i <= components@.len(),
            components@ == selected(all_components(), chosen@),
            want == stress_header_of(chosen@),
            header@.len() == i,
            forall|k: int| 0 <= k < i ==> #[trigger] header@[k]@ == want[k],
        decreases components@.len() - i,
    {
        proof {
            reveal_strlit("E");
        }
        let mut name = String::from_str("E");
        name.append(components[i].name());
        header.push(name);
        i = i + 1;
    }
    proof {
        reveal_strlit("Broken");
    }
    header.push(String::from_str("Broken"));
    Some(header)
}

/// How many of the first `n` flags are set.
pub open spec fn flag_count(chosen: Seq<bool>, n: int) -> nat
    decreases n,
{
    if n <= 0 {
        0
    } else {
        flag_count(chosen, n - 1) + if chosen[n - 1] {
            1nat
        } else {
            0nat
        }
    }
}

/// `x` is one of the items of `items` whose flag is set.
pub open spec fn is_chosen_item<T>(items: Seq<T>, chosen: Seq<bool>, x: T) -> bool {
    exists|i: int| 0 <= i < items.len() && chosen[i] && #[trigger] items[i] == x
}

/// `column` is the header of a chosen component.
pub open spec fn is_chosen_column(chosen: Seq<bool>, column: Seq<char>) -> bool {
    exists|i: int| 0 <= i < 9 && chosen[i] && #[trigger] column_name(component_at(i)) == column
}

/// Selecting keeps exactly the chosen items: one per set flag, every chosen
/// item is kept, and every kept item is a chosen one.
pub proof fn law_selected_keeps_chosen<T>(items: Seq<T>, chosen: Seq<bool>)
    requires
        chosen.len() >= items.len(),
    ensures
        selected(items, chosen).len() == flag_count(chosen, items.len() as int),
        forall|i: int| 0 <= i < items.len() && chosen[i] ==> selected(items, chosen).contains(#[trigger] items[i]),
        forall|k: int|
            0 <= k < selected(items, chosen).len() ==> is_chosen_item(items, chosen, #[trigger] selected(items, chosen)[k]),
    decreases items.len(),
{
    if items.len() > 0 {
        let n = (items.len() - 1) as int;
        let prev = items.take(n);
        law_selected_keeps_chosen(prev, chosen);
        assert(items.drop_last() =~= prev);
        let before = selected(prev, chosen);
        let now = selected(items, chosen);
        assert(flag_count(chosen, prev.len() as int) == flag_count(chosen, n));
        assert forall|i: int| 0 <= i < items.len() && chosen[i] implies now.contains(#[trigger] items[i]) by {
            if i < n {
                assert(prev[i] == items[i]);
                assert(before.contains(prev[i]));
                let k = choose|k: int| 0 <= k < before.len() && before[k] == prev[i];
                assert(now[k] == before[k]);
            } else {
                assert(now[now.len() - 1] == items[i]);
            }
        }
        assert forall|k: int|
            0 <= k < now.len() implies is_chosen_item(items, chosen, #[trigger] now[k]) by {
            if k < before.len() {
                assert(now[k] == before[k]);
                assert(is_chosen_item(prev, chosen, before[k]));
                let i = choose|i: int| 0 <= i < prev.len() && chosen[i] && #[trigger] prev[i] == before[k];
                assert(items[i] == prev[i]);
            } else {
                assert(items[n] == now[k]);
            }
        }
    }
}

/// The stress table's header ends with the `Broken` column and has one
/// column before it per chosen component: the column of every chosen
/// component is there, and every column before the last belongs to a chosen
/// component.
pub proof fn law_stress_header_columns(chosen: Seq<bool>)
    requires
        chosen.len() == 9,
    ensures
        stress_header_of(chosen).len() == flag_count(chosen, 9) + 1,
        stress_header_of(chosen).last() == "Broken"@,
        forall|i: int| 0 <= i < 9 && chosen[i] ==> stress_header_of(chosen).contains(
            column_name(#[trigger] component_at(i)),
        ),
        forall|k: int|
            0 <= k < stress_header_of(chosen).len() - 1 ==> is_chosen_column(
                chosen,
                #[trigger] stress_header_of(chosen)[k],
            ),
{
    let all = all_components();
    law_selected_keeps_chosen(all, chosen);
    let sel = selected(all, chosen);
    let h = stress_header_of(chosen);
    assert forall|i: int| 0 <= i < 9 && chosen[i] implies h.contains(column_name(#[trigger] component_at(i))) by {
        assert(all[i] == component_at(i));
        assert(sel.contains(all[i]));
        let k = choose|k: int| 0 <= k < sel.len() && sel[k] == all[i];
        assert(h[k] == column_name(sel[k]));
    }
    assert forall|k: int| 0 <= k < h.len() - 1 implies is_chosen_column(chosen, #[trigger] h[k]) by {
        assert(h[k] == column_name(sel[k]));
        assert(is_chosen_item(all, chosen, sel[k]));
        let i = choose|i: int| 0 <= i < all.len() && chosen[i] && #[trigger] all[i] == sel[k];
        assert(all[i] == component_at(i));
        assert(column_name(component_at(i)) == h[k]);
    }
}

/// The files one export writes.
#[derive(Debug, Clone, Copy, PartialEq, Eq, Structural)]
pub enum ExportFile {
    /// The node positions of a time step, as CSV.
    Points,
    /// The chosen stresses of the elements of a time step, as CSV.
    Stress,
    /// All data of a time step in the binary format.
    Data,
}

/// The name of the file of kind `kind` for time step `time_step`.
pub open spec fn file_name_of(kind: ExportFile, time_step: u128) -> Seq<char> {
    match kind {
        ExportFile::Points => "Points_"@ + decimal_text(time_step as nat) + ".csv"@,
        ExportFile::Stress => "Stress_"@ + decimal_text(time_step as nat) + ".csv"@,
        ExportFile::Data => "Data_"@ + decimal_text(time_step as nat) + ".pot"@,
    }
}

/// The name of the file of kind `kind` for time step `time_step`, such as
/// `Points_120.csv`.
pub fn file_name(kind: ExportFile, time_step: u128) -> (s: String)
    ensures
        s@ == file_name_of(kind, time_step),
{
    proof {
        reveal_strlit("Points_");
        reveal_strlit("Stress_");
        reveal_strlit("Data_");
        reveal_strlit(".csv");
        reveal_strlit(".pot");
    }
    let (stem, extension) = match kind {
        ExportFile::Points => ("Points_", ".csv"),
        ExportFile::Stress => ("Stress_", ".csv"),
        ExportFile::Data => ("Data_", ".pot"),
    };
    let mut s = String::from_str(stem);
    push_decimal(&mut s, time_step);
    s.append(extension);
    s
}

/// The name of the file that holds the elements of the mesh.
pub fn elements_file_name() -> (s: String)
    ensures
        s@ == "Elements.csv"@,
{
    String::from_str("Elements.csv")
}

/// The header of the points table.
pub fn points_header() -> (h: [&'static str; 3])
    ensures
        h[0]@ == "X"@,
        h[1]@ == "Y"@,
        h[2]@ == "Z"@,
{
    ["X", "Y", "Z"]
}

} // verus!
